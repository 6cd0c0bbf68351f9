//! The transducer: an ordered chain of rewrite rules applied to one
//! candidate span, and the reassembly of the file around it.  The order of
//! the chain is part of the contract: later rules assume earlier ones have
//! already rewritten their sub-patterns.

use vstd::prelude::*;
use crate::rules::{run_rule, run_rule_spec, Mode, Rule, RuleView};
use crate::text::{lit, push_all, replace_lit, replace_lit_spec, sub_vec};

verus! {

/// The transduction chain over one chunk of markup, rule by rule in the
/// published order.
#[verifier::opaque]
pub open spec fn convert_chunk_spec(c: Seq<char>) -> Seq<char> {
    let c1 = run_rule_spec(
        RuleView::Elem {
            pre: "`"@,
            open: "<literal>"@,
            close: "</literal>"@,
            bad: '`',
            post: "`"@,
            mode: Mode::Decode,
        },
        c,
    );
    let c2 = run_rule_spec(
        RuleView::Elem {
            pre: "{file}`"@,
            open: "<filename>"@,
            close: "</filename>"@,
            bad: '`',
            post: "`"@,
            mode: Mode::Decode,
        },
        c1,
    );
    let c3 = run_rule_spec(
        RuleView::Elem {
            pre: "{option}`"@,
            open: "<option>"@,
            close: "</option>"@,
            bad: '`',
            post: "`"@,
            mode: Mode::Decode,
        },
        c2,
    );
    let c4 = run_rule_spec(
        RuleView::Elem {
            pre: "{command}`"@,
            open: "<command>"@,
            close: "</command>"@,
            bad: '`',
            post: "`"@,
            mode: Mode::Decode,
        },
        c3,
    );
    let c5 = run_rule_spec(RuleView::LinkSelf, c4);
    let c6 = run_rule_spec(RuleView::LinkBody, c5);
    let c7 = run_rule_spec(RuleView::Xref, c6);
    let c8 = run_rule_spec(RuleView::LinkRef, c7);
    let c9 = run_rule_spec(
        RuleView::Elem {
            pre: "*"@,
            open: "<emphasis>"@,
            close: "</emphasis>"@,
            bad: '*',
            post: "*"@,
            mode: Mode::Escape,
        },
        c8,
    );
    let c10 = run_rule_spec(
        RuleView::Elem {
            pre: "**"@,
            open: "<emphasis role=\"strong\">"@,
            close: "</emphasis>"@,
            bad: '*',
            post: "**"@,
            mode: Mode::Escape,
        },
        c9,
    );
    let c11 = run_rule_spec(RuleView::CiteRef, c10);
    let c12 = run_rule_spec(RuleView::ProgLang, c11);
    let c13 = replace_lit_spec(c12, "<programlisting>"@, "```"@);
    let c14 = replace_lit_spec(c13, "</programlisting>"@, "```"@);
    let c15 = run_rule_spec(
        RuleView::Elem {
            pre: "{var}`"@,
            open: "<varname>"@,
            close: "</varname>"@,
            bad: '*',
            post: "`"@,
            mode: Mode::Verbatim,
        },
        c14,
    );
    let c16 = run_rule_spec(
        RuleView::Elem {
            pre: "{env}`"@,
            open: "<envar>"@,
            close: "</envar>"@,
            bad: '*',
            post: "`"@,
            mode: Mode::Verbatim,
        },
        c15,
    );
    let c17 = run_rule_spec(
        RuleView::Adm { open: "<note>"@, close: "</note>"@, cls: ".note"@ },
        c16,
    );
    let c18 = run_rule_spec(
        RuleView::Adm { open: "<warning>"@, close: "</warning>"@, cls: ".warning"@ },
        c17,
    );
    let c19 = run_rule_spec(
        RuleView::Adm { open: "<important>"@, close: "</important>"@, cls: ".important"@ },
        c18,
    );
    run_rule_spec(RuleView::ParaCollapse, c19)
}

/// The whole converted file: prefix and suffix verbatim, the chunk
/// transduced and wrapped in the migrated-marker call, parenthesized on
/// demand.
pub open spec fn convert_one_spec(s: Seq<char>, start: int, end: int, add_parens: bool) -> Seq<
    char,
> {
    s.subrange(0, start) + (if add_parens {
        "("@
    } else {
        Seq::empty()
    }) + "lib.mdDoc "@ + convert_chunk_spec(s.subrange(start, end)) + (if add_parens {
        ")"@
    } else {
        Seq::empty()
    }) + s.subrange(end, s.len() as int)
}

fn elem_rule(pre: &str, open: &str, close: &str, bad: char, post: &str, mode: Mode) -> (r: Rule)
    ensures
        r@ == (RuleView::Elem { pre: pre@, open: open@, close: close@, bad, post: post@, mode }),
{
    Rule::Elem { pre: lit(pre), open: lit(open), close: lit(close), bad, post: lit(post), mode }
}

fn adm_rule(open: &str, close: &str, cls: &str) -> (r: Rule)
    ensures
        r@ == (RuleView::Adm { open: open@, close: close@, cls: cls@ }),
{
    Rule::Adm { open: lit(open), close: lit(close), cls: lit(cls) }
}

/// Applies the transduction chain to one chunk of markup.
pub fn convert_chunk(c: &Vec<char>) -> (r: Vec<char>)
    ensures
        r@ == convert_chunk_spec(c@),
{
    proof {
        reveal(convert_chunk_spec);
        reveal_strlit("<literal>");
        reveal_strlit("<filename>");
        reveal_strlit("<option>");
        reveal_strlit("<command>");
        reveal_strlit("<emphasis>");
        reveal_strlit("<emphasis role=\"strong\">");
        reveal_strlit("<varname>");
        reveal_strlit("<envar>");
        reveal_strlit("<note>");
        reveal_strlit("<warning>");
        reveal_strlit("<important>");
    }
    let c1 = run_rule(&elem_rule("`", "<literal>", "</literal>", '`', "`", Mode::Decode), c);
    let c2 = run_rule(
        &elem_rule("{file}`", "<filename>", "</filename>", '`', "`", Mode::Decode),
        &c1,
    );
    let c3 = run_rule(
        &elem_rule("{option}`", "<option>", "</option>", '`', "`", Mode::Decode),
        &c2,
    );
    let c4 = run_rule(
        &elem_rule("{command}`", "<command>", "</command>", '`', "`", Mode::Decode),
        &c3,
    );
    let c5 = run_rule(&Rule::LinkSelf, &c4);
    let c6 = run_rule(&Rule::LinkBody, &c5);
    let c7 = run_rule(&Rule::Xref, &c6);
    let c8 = run_rule(&Rule::LinkRef, &c7);
    let c9 = run_rule(&elem_rule("*", "<emphasis>", "</emphasis>", '*', "*", Mode::Escape), &c8);
    let c10 = run_rule(
        &elem_rule("**", "<emphasis role=\"strong\">", "</emphasis>", '*', "**", Mode::Escape),
        &c9,
    );
    let c11 = run_rule(&Rule::CiteRef, &c10);
    let c12 = run_rule(&Rule::ProgLang, &c11);
    let c13 = replace_lit(&c12, &lit("<programlisting>"), &lit("```"));
    let c14 = replace_lit(&c13, &lit("</programlisting>"), &lit("```"));
    let c15 = run_rule(&elem_rule("{var}`", "<varname>", "</varname>", '*', "`", Mode::Verbatim), &c14);
    let c16 = run_rule(&elem_rule("{env}`", "<envar>", "</envar>", '*', "`", Mode::Verbatim), &c15);
    let c17 = run_rule(&adm_rule("<note>", "</note>", ".note"), &c16);
    let c18 = run_rule(&adm_rule("<warning>", "</warning>", ".warning"), &c17);
    let c19 = run_rule(&adm_rule("<important>", "</important>", ".important"), &c18);
    run_rule(&Rule::ParaCollapse, &c19)
}

/// Rewrites the span `[start, end)` of `s` into the target dialect and
/// wraps it in the migrated-marker call; the rest of the file is kept
/// verbatim.
pub fn convert_one(s: &Vec<char>, start: usize, end: usize, add_parens: bool) -> (r: Vec<char>)
    requires
        start <= end <= s.len(),
    ensures
        r@ == convert_one_spec(s@, start as int, end as int, add_parens),
{
    let chunk = sub_vec(s, start, end);
    let conv = convert_chunk(&chunk);
    let mut out = sub_vec(s, 0, start);
    if add_parens {
        push_all(&mut out, &lit("("));
    }
    push_all(&mut out, &lit("lib.mdDoc "));
    push_all(&mut out, &conv);
    if add_parens {
        push_all(&mut out, &lit(")"));
    }
    push_all(&mut out, &sub_vec(s, end, s.len()));
    proof {
        assert(out@ =~= convert_one_spec(s@, start as int, end as int, add_parens));
    }
    out
}

} // verus!
