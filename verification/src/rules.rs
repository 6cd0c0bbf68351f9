//! The rewrite-rule engine.  A rule describes one pattern family of the
//! transducer or of the normalizer; `run_rule` applies a rule to a whole
//! text, scanning left to right and replacing every match, exactly as an
//! ordered rewrite chain demands.

use vstd::prelude::*;
use crate::escape::{decode_angles, decode_angles_spec, markdown_escape, markdown_escape_spec};
use crate::text::CharClass;
use crate::text::{
    char_in_class, check_no_char, find_char_at, find_char_from, find_from, find_last_at,
    find_last_from, find_at, in_class, is_at, lit, match_at, no_char_in, push_all, rtrim_end,
    run_end, scan_rtrim, scan_run, sub_vec,
};

verus! {

/// How the captured body of an element rewrite is transformed.
#[derive(Clone, Copy, PartialEq, Eq)]
pub enum Mode {
    /// The body is kept as it stands.
    Verbatim,
    /// Angle-bracket entities are decoded.
    Decode,
    /// Backtick and asterisk are escaped and entities decoded.
    Escape,
}

pub open spec fn transform_spec(m: Mode, b: Seq<char>) -> Seq<char> {
    match m {
        Mode::Verbatim => b,
        Mode::Decode => decode_angles_spec(b),
        Mode::Escape => markdown_escape_spec(b),
    }
}

/// Mathematical model of a rule: the fixed fragments of its pattern.
pub enum RuleView {
    /// `open` body `close`, body free of `bad`, emitted as
    /// `pre` transformed-body `post`.
    Elem { pre: Seq<char>, open: Seq<char>, close: Seq<char>, bad: char, post: Seq<char>, mode: Mode },
    /// Bare hyperlink with only a target attribute.
    LinkSelf,
    /// Hyperlink with attribute target and inline body.
    LinkBody,
    /// Cross-reference with no body.
    Xref,
    /// Cross-reference link with a body.
    LinkRef,
    /// Man-page reference: title and volume number.
    CiteRef,
    /// Opening fenced-code tag with a language attribute.
    ProgLang,
    /// Admonition block anchored at line start, `cls` its role class.
    Adm { open: Seq<char>, close: Seq<char>, cls: Seq<char> },
    /// Adjacent paragraph boundaries collapsed to a blank line.
    ParaCollapse,
    /// Runs of newlines collapsed to one.
    CollapseNl,
    /// Whitespace before a tag boundary becomes a newline.
    WsAngle,
    /// Whitespace after a closing angle bracket becomes a newline.
    GtWs,
    /// Code-block opening rendered onto its surrounding paragraph.
    ProgOpenFix,
    /// Code-block closing rendered onto a following paragraph.
    ProgCloseFix,
    /// Paragraph boundary pairs put on one canonical line.
    ParaParaFix,
    /// A hyperlink wrapping only a man-page reference is unwrapped.
    CiteLinkFix,
}

/// A rule, exec form; `Vec` fields carry the pattern fragments.
pub enum Rule {
    Elem { pre: Vec<char>, open: Vec<char>, close: Vec<char>, bad: char, post: Vec<char>, mode: Mode },
    LinkSelf,
    LinkBody,
    Xref,
    LinkRef,
    CiteRef,
    ProgLang,
    Adm { open: Vec<char>, close: Vec<char>, cls: Vec<char> },
    ParaCollapse,
    CollapseNl,
    WsAngle,
    GtWs,
    ProgOpenFix,
    ProgCloseFix,
    ParaParaFix,
    CiteLinkFix,
}

impl View for Rule {
    type V = RuleView;

    open spec fn view(&self) -> RuleView {
        match self {
            Rule::Elem { pre, open, close, bad, post, mode } => RuleView::Elem {
                pre: pre@,
                open: open@,
                close: close@,
                bad: *bad,
                post: post@,
                mode: *mode,
            },
            Rule::LinkSelf => RuleView::LinkSelf,
            Rule::LinkBody => RuleView::LinkBody,
            Rule::Xref => RuleView::Xref,
            Rule::LinkRef => RuleView::LinkRef,
            Rule::CiteRef => RuleView::CiteRef,
            Rule::ProgLang => RuleView::ProgLang,
            Rule::Adm { open, close, cls } => RuleView::Adm {
                open: open@,
                close: close@,
                cls: cls@,
            },
            Rule::ParaCollapse => RuleView::ParaCollapse,
            Rule::CollapseNl => RuleView::CollapseNl,
            Rule::WsAngle => RuleView::WsAngle,
            Rule::GtWs => RuleView::GtWs,
            Rule::ProgOpenFix => RuleView::ProgOpenFix,
            Rule::ProgCloseFix => RuleView::ProgCloseFix,
            Rule::ParaParaFix => RuleView::ParaParaFix,
            Rule::CiteLinkFix => RuleView::CiteLinkFix,
        }
    }
}

/// The fixed fragments a rule is built with are never empty where a match
/// must consume text.
pub open spec fn rule_wf(r: RuleView) -> bool {
    match r {
        RuleView::Elem { open, .. } => open.len() > 0,
        RuleView::Adm { open, .. } => open.len() > 0,
        _ => true,
    }
}

/// `open` body `close` at `i`, the body free of `bad` and ending at the
/// first `close`; emitted as `pre` transformed-body `post`.
pub open spec fn elem_match_at(
    s: Seq<char>,
    i: int,
    pre: Seq<char>,
    open: Seq<char>,
    close: Seq<char>,
    bad: char,
    post: Seq<char>,
    mode: Mode,
) -> Option<(int, Seq<char>)> {
    if is_at(s, open, i) {
        match find_at(s, close, i + open.len()) {
            Some(j) => if no_char_in(s, bad, i + open.len(), j) {
                Some(
                    (
                        j + close.len(),
                        pre + transform_spec(mode, s.subrange(i + open.len(), j)) + post,
                    ),
                )
            } else {
                None
            },
            None => None,
        }
    } else {
        None
    }
}

/// `<link` ws `xlink:href=` ws `"`target`"` ws `/>`, emitted as an
/// angle-bracket autolink with the target escaped.
pub open spec fn link_self_match_at(s: Seq<char>, i: int) -> Option<(int, Seq<char>)> {
    if is_at(s, "<link"@, i) {
        let a = run_end(s, i + "<link"@.len(), CharClass::Ws);
        if is_at(s, "xlink:href="@, a) {
            let b = run_end(s, a + "xlink:href="@.len(), CharClass::Ws);
            if b < s.len() && s[b] == '"' {
                match find_char_at(s, '"', b + 1) {
                    Some(q) => if q > b + 1 {
                        let c = run_end(s, q + 1, CharClass::Ws);
                        if is_at(s, "/>"@, c) {
                            Some(
                                (
                                    c + "/>"@.len(),
                                    "<"@ + markdown_escape_spec(s.subrange(b + 1, q)) + ">"@,
                                ),
                            )
                        } else {
                            None
                        }
                    } else {
                        None
                    },
                    None => None,
                }
            } else {
                None
            }
        } else {
            None
        }
    } else {
        None
    }
}

/// `<link` ws `xlink:href=` ws `"`target`">`body`</link>`, emitted as a
/// standard link, body and target escaped.
pub open spec fn link_body_match_at(s: Seq<char>, i: int) -> Option<(int, Seq<char>)> {
    if is_at(s, "<link"@, i) {
        let a = run_end(s, i + "<link"@.len(), CharClass::Ws);
        if is_at(s, "xlink:href="@, a) {
            let b = run_end(s, a + "xlink:href="@.len(), CharClass::Ws);
            if b < s.len() && s[b] == '"' {
                match find_char_at(s, '"', b + 1) {
                    Some(q) => if q > b + 1 && q + 1 < s.len() && s[q + 1] == '>' {
                        match find_at(s, "</link>"@, q + 2) {
                            Some(m) => Some(
                                (
                                    m + "</link>"@.len(),
                                    markdown_escape_spec(
                                        "["@ + s.subrange(q + 2, m) + "]("@ + s.subrange(b + 1, q)
                                            + ")"@,
                                    ),
                                ),
                            ),
                            None => None,
                        }
                    } else {
                        None
                    },
                    None => None,
                }
            } else {
                None
            }
        } else {
            None
        }
    } else {
        None
    }
}

/// `<xref` ws `linkend="`id`"` ws `/>`, emitted as a self-referencing link.
pub open spec fn xref_match_at(s: Seq<char>, i: int) -> Option<(int, Seq<char>)> {
    if is_at(s, "<xref"@, i) {
        let a = run_end(s, i + "<xref"@.len(), CharClass::Ws);
        if is_at(s, "linkend=\""@, a) {
            let i0 = a + "linkend=\""@.len();
            match find_char_at(s, '"', i0) {
                Some(q) => if q > i0 {
                    let c = run_end(s, q + 1, CharClass::Ws);
                    if is_at(s, "/>"@, c) {
                        Some(
                            (
                                c + "/>"@.len(),
                                "[](#"@ + markdown_escape_spec(s.subrange(i0, q)) + ")"@,
                            ),
                        )
                    } else {
                        None
                    }
                } else {
                    None
                },
                None => None,
            }
        } else {
            None
        }
    } else {
        None
    }
}

/// `<link linkend="`id`">`body`</link>`, emitted as a reference link.
pub open spec fn link_ref_match_at(s: Seq<char>, i: int) -> Option<(int, Seq<char>)> {
    if is_at(s, "<link linkend=\""@, i) {
        let i0 = i + "<link linkend=\""@.len();
        match find_at(s, "\">"@, i0) {
            Some(q) => if q > i0 {
                match find_at(s, "</link>"@, q + "\">"@.len()) {
                    Some(m) => Some(
                        (
                            m + "</link>"@.len(),
                            markdown_escape_spec(
                                "["@ + s.subrange(q + "\">"@.len(), m) + "](#"@ + s.subrange(
                                    i0,
                                    q,
                                ) + ")"@,
                            ),
                        ),
                    ),
                    None => None,
                }
            } else {
                None
            },
            None => None,
        }
    } else {
        None
    }
}

/// Man-page reference: title and volume number, whitespace-tolerant,
/// emitted as a manpage-role-tagged backtick pair.
pub open spec fn cite_ref_match_at(s: Seq<char>, i: int) -> Option<(int, Seq<char>)> {
    if is_at(s, "<citerefentry>"@, i) {
        let a = run_end(s, i + "<citerefentry>"@.len(), CharClass::Ws);
        if is_at(s, "<refentrytitle>"@, a) {
            let t0 = a + "<refentrytitle>"@.len();
            match find_at(s, "</refentrytitle>"@, t0) {
                Some(t) => {
                    let tl0 = run_end(s, t0, CharClass::Ws);
                    let tl = if tl0 > t { t } else { tl0 };
                    let title = s.subrange(tl, rtrim_end(s, tl, t));
                    let b = run_end(s, t + "</refentrytitle>"@.len(), CharClass::Ws);
                    if is_at(s, "<manvolnum>"@, b) {
                        let v0 = b + "<manvolnum>"@.len();
                        match find_at(s, "</manvolnum>"@, v0) {
                            Some(v) => {
                                let vl0 = run_end(s, v0, CharClass::Ws);
                                let vl = if vl0 > v { v } else { vl0 };
                                let vol = s.subrange(vl, rtrim_end(s, vl, v));
                                let c = run_end(s, v + "</manvolnum>"@.len(), CharClass::Ws);
                                if is_at(s, "</citerefentry>"@, c) {
                                    Some(
                                        (
                                            c + "</citerefentry>"@.len(),
                                            "{manpage}`"@ + title + "("@ + vol + ")`"@,
                                        ),
                                    )
                                } else {
                                    None
                                }
                            },
                            None => None,
                        }
                    } else {
                        None
                    }
                },
                None => None,
            }
        } else {
            None
        }
    } else {
        None
    }
}

/// Opening fenced-code tag with a language attribute.
pub open spec fn prog_lang_match_at(s: Seq<char>, i: int) -> Option<(int, Seq<char>)> {
    if is_at(s, "<programlisting language=\""@, i) {
        let l0 = i + "<programlisting language=\""@.len();
        match find_char_at(s, '"', l0) {
            Some(q) => if q > l0 && q + 1 < s.len() && s[q + 1] == '>' {
                Some((q + 2, "```"@ + s.subrange(l0, q)))
            } else {
                None
            },
            None => None,
        }
    } else {
        None
    }
}

/// End of an admonition body: the first point followed by an optional
/// paragraph close and the admonition's closing tag.
pub open spec fn adm_body_end(s: Seq<char>, close: Seq<char>, p: int) -> Option<(int, int)>
    decreases s.len() - p + 1,
{
    if p < 0 || p > s.len() {
        None
    } else if is_at(s, "</para>"@, p) && is_at(
        s,
        close,
        run_end(s, p + "</para>"@.len(), CharClass::Ws),
    ) {
        Some((p, run_end(s, p + "</para>"@.len(), CharClass::Ws) + close.len()))
    } else if is_at(s, close, p) {
        Some((p, p + close.len()))
    } else if p == s.len() {
        None
    } else {
        adm_body_end(s, close, p + 1)
    }
}

/// Admonition block at line start: captured indentation, optional inner
/// paragraph marker, emitted as a fenced container block that reproduces
/// the indentation on every line.
pub open spec fn adm_match_at(
    s: Seq<char>,
    i: int,
    open: Seq<char>,
    close: Seq<char>,
    cls: Seq<char>,
    bol: bool,
) -> Option<(int, Seq<char>)> {
    if !bol {
        None
    } else {
        let e = run_end(s, i, CharClass::Space);
        if is_at(s, open, e) {
            let after = e + open.len();
            let w = run_end(s, after, CharClass::Ws);
            let b0 = if is_at(s, "<para>"@, w) {
                w + "<para>"@.len()
            } else {
                after
            };
            match adm_body_end(s, close, b0) {
                Some((bend, mend)) => {
                    let ind = s.subrange(i, e);
                    Some(
                        (
                            mend,
                            ind + "::: {"@ + cls + "}\n"@ + ind + s.subrange(b0, bend) + "\n"@
                                + ind + ":::"@,
                        ),
                    )
                },
                None => None,
            }
        } else {
            None
        }
    }
}

/// Adjacent paragraph-boundary markers separated only by blank lines.
pub open spec fn para_collapse_match_at(s: Seq<char>, i: int) -> Option<(int, Seq<char>)> {
    if 0 <= i < s.len() && s[i] == '\n' {
        let n1 = run_end(s, i, CharClass::Newline);
        let sp = run_end(s, n1, CharClass::Space);
        if is_at(s, "</para>"@, sp) {
            let k = sp + "</para>"@.len();
            let m = if k < s.len() && s[k] == '\n' && is_at(
                s,
                "<para>"@,
                run_end(s, k + 1, CharClass::Space),
            ) {
                run_end(s, k + 1, CharClass::Space)
            } else {
                k
            };
            if is_at(s, "<para>"@, m) {
                let n2s = m + "<para>"@.len();
                let n2 = run_end(s, n2s, CharClass::Newline);
                if n2 > n2s {
                    Some((n2, "\n\n"@))
                } else {
                    None
                }
            } else {
                None
            }
        } else {
            None
        }
    } else {
        None
    }
}

/// A run of newlines collapsed to one.
pub open spec fn collapse_nl_match_at(s: Seq<char>, i: int) -> Option<(int, Seq<char>)> {
    if 0 <= i < s.len() && s[i] == '\n' {
        Some((run_end(s, i, CharClass::Newline), "\n"@))
    } else {
        None
    }
}

/// Whitespace followed by an angle bracket becomes a newline before it.
pub open spec fn ws_angle_match_at(s: Seq<char>, i: int) -> Option<(int, Seq<char>)> {
    if 0 <= i < s.len() && in_class(s[i], CharClass::Ws) {
        let w = run_end(s, i, CharClass::Ws);
        if w < s.len() && (s[w] == '<' || s[w] == '>') {
            Some((w + 1, "\n"@ + s.subrange(w, w + 1)))
        } else {
            None
        }
    } else {
        None
    }
}

/// A closing angle bracket followed by whitespace keeps only a newline.
pub open spec fn gt_ws_match_at(s: Seq<char>, i: int) -> Option<(int, Seq<char>)> {
    if 0 <= i < s.len() && s[i] == '>' {
        let w = run_end(s, i + 1, CharClass::Ws);
        if w > i + 1 {
            Some((w, ">\n"@))
        } else {
            None
        }
    } else {
        None
    }
}

/// A code-block opening, optionally after a paragraph close, is joined to
/// a canonical paragraph boundary.
pub open spec fn prog_open_fix_match_at(s: Seq<char>, i: int) -> Option<(int, Seq<char>)> {
    if 0 <= i < s.len() {
        let k1 = if s[i] == '\n' {
            i + 1
        } else {
            i
        };
        let k2 = if is_at(s, "</para>"@, k1) {
            k1 + "</para>"@.len()
        } else {
            k1
        };
        if is_at(s, "<programlisting"@, k2) {
            let a0 = k2 + "<programlisting"@.len();
            match find_char_at(s, '>', a0) {
                Some(g) => if g + 1 < s.len() && s[g + 1] == '\n' {
                    Some((g + 2, "</para><programlisting"@ + s.subrange(a0, g) + ">"@))
                } else {
                    None
                },
                None => None,
            }
        } else {
            None
        }
    } else {
        None
    }
}

/// A code-block closing at line start, with optional paragraph markers, is
/// joined to a canonical paragraph opening.
pub open spec fn prog_close_fix_match_at(s: Seq<char>, i: int, bol: bool) -> Option<
    (int, Seq<char>),
> {
    if bol && is_at(s, "</programlisting>"@, i) {
        let k0 = i + "</programlisting>"@.len();
        let k1 = if k0 < s.len() && s[k0] == '\n' && is_at(s, "</para>"@, k0 + 1) {
            k0 + 1 + "</para>"@.len()
        } else if is_at(s, "</para>"@, k0) {
            k0 + "</para>"@.len()
        } else {
            k0
        };
        let k2 = if k1 < s.len() && s[k1] == '\n' && is_at(s, "<para>"@, k1 + 1) {
            k1 + 1 + "<para>"@.len()
        } else if is_at(s, "<para>"@, k1) {
            k1 + "<para>"@.len()
        } else {
            k1
        };
        let k3 = if k2 < s.len() && s[k2] == '\n' {
            k2 + 1
        } else {
            k2
        };
        Some((k3, "</programlisting><para>"@))
    } else {
        None
    }
}

/// A paragraph close and open, with surrounding whitespace, put on one
/// canonical line.
pub open spec fn para_para_fix_match_at(s: Seq<char>, i: int) -> Option<(int, Seq<char>)> {
    let w1 = run_end(s, i, CharClass::Ws);
    if is_at(s, "</para>"@, w1) {
        let w2 = run_end(s, w1 + "</para>"@.len(), CharClass::Ws);
        if is_at(s, "<para>"@, w2) {
            let w3 = run_end(s, w2 + "<para>"@.len(), CharClass::Ws);
            Some((w3, "\n</para><para>\n"@))
        } else {
            None
        }
    } else {
        None
    }
}

/// A hyperlink whose body is exactly a man-page reference keeps only the
/// reference; the body may not span lines.
pub open spec fn cite_link_fix_match_at(s: Seq<char>, i: int) -> Option<(int, Seq<char>)> {
    if is_at(s, "<link xlink:href=\""@, i) {
        let u0 = i + "<link xlink:href=\""@.len();
        match find_char_at(s, '"', u0) {
            Some(q) => if q > u0 && q + 1 < s.len() && s[q + 1] == '>' {
                let b0 = q + 2;
                if is_at(s, "<citerefentry>"@, b0) {
                    let from = b0 + "<citerefentry>"@.len();
                    let hi = match find_char_at(s, '\n', from) {
                        Some(nl) => nl,
                        None => s.len() as int,
                    };
                    match find_last_at(s, "</citerefentry></link>"@, from, hi) {
                        Some(j) => Some(
                            (
                                j + "</citerefentry></link>"@.len(),
                                s.subrange(b0, j + "</citerefentry>"@.len()),
                            ),
                        ),
                        None => None,
                    }
                } else {
                    None
                }
            } else {
                None
            },
            None => None,
        }
    } else {
        None
    }
}

/// What rule `r` matches at position `i` of `s`: the position after the
/// match and the text emitted for it.
pub open spec fn rule_match_at(r: RuleView, s: Seq<char>, i: int, bol: bool) -> Option<
    (int, Seq<char>),
> {
    match r {
        RuleView::Elem { pre, open, close, bad, post, mode } => elem_match_at(
            s,
            i,
            pre,
            open,
            close,
            bad,
            post,
            mode,
        ),
        RuleView::LinkSelf => link_self_match_at(s, i),
        RuleView::LinkBody => link_body_match_at(s, i),
        RuleView::Xref => xref_match_at(s, i),
        RuleView::LinkRef => link_ref_match_at(s, i),
        RuleView::CiteRef => cite_ref_match_at(s, i),
        RuleView::ProgLang => prog_lang_match_at(s, i),
        RuleView::Adm { open, close, cls } => adm_match_at(s, i, open, close, cls, bol),
        RuleView::ParaCollapse => para_collapse_match_at(s, i),
        RuleView::CollapseNl => collapse_nl_match_at(s, i),
        RuleView::WsAngle => ws_angle_match_at(s, i),
        RuleView::GtWs => gt_ws_match_at(s, i),
        RuleView::ProgOpenFix => prog_open_fix_match_at(s, i),
        RuleView::ProgCloseFix => prog_close_fix_match_at(s, i, bol),
        RuleView::ParaParaFix => para_para_fix_match_at(s, i),
        RuleView::CiteLinkFix => cite_link_fix_match_at(s, i),
    }
}

/// One left-to-right pass of rule `r` over `s[i..]`; `bol` says whether
/// `i` stands at the beginning of a line.
pub open spec fn apply_from(r: RuleView, s: Seq<char>, i: int, bol: bool) -> Seq<char>
    decreases s.len() - i,
{
    if i < 0 || i >= s.len() {
        Seq::empty()
    } else {
        match rule_match_at(r, s, i, bol) {
            Some((end, out)) => if i < end <= s.len() {
                out + apply_from(r, s, end, s[end - 1] == '\n')
            } else {
                seq![s[i]] + apply_from(r, s, i + 1, s[i] == '\n')
            },
            None => seq![s[i]] + apply_from(r, s, i + 1, s[i] == '\n'),
        }
    }
}

/// Rule `r` applied to the whole of `s`.
pub open spec fn run_rule_spec(r: RuleView, s: Seq<char>) -> Seq<char> {
    apply_from(r, s, 0, true)
}

/// Copies a text.
pub fn copy_vec(b: &Vec<char>) -> (r: Vec<char>)
    ensures
        r@ == b@,
{
    let r = sub_vec(b, 0, b.len());
    proof {
        assert(b@.subrange(0, b@.len() as int) =~= b@);
    }
    r
}

/// Exec mirror of `transform_spec`.
pub fn transform(mode: Mode, b: &Vec<char>) -> (t: Vec<char>)
    ensures
        t@ == transform_spec(mode, b@),
{
    match mode {
        Mode::Verbatim => copy_vec(b),
        Mode::Decode => decode_angles(b),
        Mode::Escape => markdown_escape(b),
    }
}

fn elem_try(
    s: &Vec<char>,
    i: usize,
    pre: &Vec<char>,
    open: &Vec<char>,
    close: &Vec<char>,
    bad: char,
    post: &Vec<char>,
    mode: Mode,
) -> (m: Option<(usize, Vec<char>)>)
    requires
        i < s.len(),
        open@.len() > 0,
    ensures
        match m {
            Some(t) => i < t.0 <= s.len() && elem_match_at(
                s@,
                i as int,
                pre@,
                open@,
                close@,
                bad,
                post@,
                mode,
            ) == Some((t.0 as int, t.1@)),
            None => elem_match_at(s@, i as int, pre@, open@, close@, bad, post@, mode) is None,
        },
{
    if !match_at(s, open, i) {
        return None;
    }
    let b0 = i + open.len();
    match find_from(s, close, b0) {
        None => None,
        Some(j) => {
            if !check_no_char(s, bad, b0, j) {
                return None;
            }
            let body = sub_vec(s, b0, j);
            let t = transform(mode, &body);
            let mut piece: Vec<char> = Vec::new();
            push_all(&mut piece, pre);
            push_all(&mut piece, &t);
            push_all(&mut piece, post);
            proof {
                assert(piece@ =~= pre@ + transform_spec(
                    mode,
                    s@.subrange(b0 as int, j as int),
                ) + post@);
            }
            Some((j + close.len(), piece))
        },
    }
}

fn link_self_try(s: &Vec<char>, i: usize) -> (m: Option<(usize, Vec<char>)>)
    requires
        i < s.len(),
    ensures
        match m {
            Some(t) => i < t.0 <= s.len() && link_self_match_at(s@, i as int) == Some(
                (t.0 as int, t.1@),
            ),
            None => link_self_match_at(s@, i as int) is None,
        },
{
    let lopen = lit("<link");
    if !match_at(s, &lopen, i) {
        return None;
    }
    let a = scan_run(s, i + lopen.len(), CharClass::Ws);
    let href = lit("xlink:href=");
    if !match_at(s, &href, a) {
        return None;
    }
    let b = scan_run(s, a + href.len(), CharClass::Ws);
    if !(b < s.len()) {
        return None;
    }
    if s[b] != '"' {
        return None;
    }
    match find_char_from(s, '"', b + 1) {
        None => None,
        Some(q) => {
            if !(q > b + 1) {
                return None;
            }
            let c = scan_run(s, q + 1, CharClass::Ws);
            let slash = lit("/>");
            if !match_at(s, &slash, c) {
                return None;
            }
            let url = sub_vec(s, b + 1, q);
            let esc = markdown_escape(&url);
            let mut piece = lit("<");
            push_all(&mut piece, &esc);
            push_all(&mut piece, &lit(">"));
            proof {
                assert(piece@ =~= "<"@ + markdown_escape_spec(
                    s@.subrange(b as int + 1, q as int),
                ) + ">"@);
            }
            Some((c + slash.len(), piece))
        },
    }
}

fn link_body_try(s: &Vec<char>, i: usize) -> (m: Option<(usize, Vec<char>)>)
    requires
        i < s.len(),
    ensures
        match m {
            Some(t) => i < t.0 <= s.len() && link_body_match_at(s@, i as int) == Some(
                (t.0 as int, t.1@),
            ),
            None => link_body_match_at(s@, i as int) is None,
        },
{
    let lopen = lit("<link");
    if !match_at(s, &lopen, i) {
        return None;
    }
    let a = scan_run(s, i + lopen.len(), CharClass::Ws);
    let href = lit("xlink:href=");
    if !match_at(s, &href, a) {
        return None;
    }
    let b = scan_run(s, a + href.len(), CharClass::Ws);
    if !(b < s.len()) {
        return None;
    }
    if s[b] != '"' {
        return None;
    }
    match find_char_from(s, '"', b + 1) {
        None => None,
        Some(q) => {
            if !(q > b + 1) {
                return None;
            }
            if !(q + 1 < s.len()) {
                return None;
            }
            if s[q + 1] != '>' {
                return None;
            }
            let clink = lit("</link>");
            match find_from(s, &clink, q + 2) {
                None => None,
                Some(m) => {
                    let mut tmp = lit("[");
                    push_all(&mut tmp, &sub_vec(s, q + 2, m));
                    push_all(&mut tmp, &lit("]("));
                    push_all(&mut tmp, &sub_vec(s, b + 1, q));
                    push_all(&mut tmp, &lit(")"));
                    proof {
                        assert(tmp@ =~= "["@ + s@.subrange(q as int + 2, m as int) + "]("@
                            + s@.subrange(b as int + 1, q as int) + ")"@);
                    }
                    let piece = markdown_escape(&tmp);
                    Some((m + clink.len(), piece))
                },
            }
        },
    }
}

fn xref_try(s: &Vec<char>, i: usize) -> (m: Option<(usize, Vec<char>)>)
    requires
        i < s.len(),
    ensures
        match m {
            Some(t) => i < t.0 <= s.len() && xref_match_at(s@, i as int) == Some(
                (t.0 as int, t.1@),
            ),
            None => xref_match_at(s@, i as int) is None,
        },
{
    let xopen = lit("<xref");
    if !match_at(s, &xopen, i) {
        return None;
    }
    let a = scan_run(s, i + xopen.len(), CharClass::Ws);
    let lk = lit("linkend=\"");
    if !match_at(s, &lk, a) {
        return None;
    }
    let i0 = a + lk.len();
    match find_char_from(s, '"', i0) {
        None => None,
        Some(q) => {
            if !(q > i0) {
                return None;
            }
            let c = scan_run(s, q + 1, CharClass::Ws);
            let slash = lit("/>");
            if !match_at(s, &slash, c) {
                return None;
            }
            let id = sub_vec(s, i0, q);
            let esc = markdown_escape(&id);
            let mut piece = lit("[](#");
            push_all(&mut piece, &esc);
            push_all(&mut piece, &lit(")"));
            proof {
                assert(piece@ =~= "[](#"@ + markdown_escape_spec(
                    s@.subrange(i0 as int, q as int),
                ) + ")"@);
            }
            Some((c + slash.len(), piece))
        },
    }
}

fn link_ref_try(s: &Vec<char>, i: usize) -> (m: Option<(usize, Vec<char>)>)
    requires
        i < s.len(),
    ensures
        match m {
            Some(t) => i < t.0 <= s.len() && link_ref_match_at(s@, i as int) == Some(
                (t.0 as int, t.1@),
            ),
            None => link_ref_match_at(s@, i as int) is None,
        },
{
    let lopen = lit("<link linkend=\"");
    if !match_at(s, &lopen, i) {
        return None;
    }
    let i0 = i + lopen.len();
    let qgt = lit("\">");
    match find_from(s, &qgt, i0) {
        None => None,
        Some(q) => {
            if !(q > i0) {
                return None;
            }
            let clink = lit("</link>");
            match find_from(s, &clink, q + qgt.len()) {
                None => None,
                Some(m) => {
                    let mut tmp = lit("[");
                    push_all(&mut tmp, &sub_vec(s, q + qgt.len(), m));
                    push_all(&mut tmp, &lit("](#"));
                    push_all(&mut tmp, &sub_vec(s, i0, q));
                    push_all(&mut tmp, &lit(")"));
                    proof {
                        assert(tmp@ =~= "["@ + s@.subrange(
                            q as int + "\">"@.len(),
                            m as int,
                        ) + "](#"@ + s@.subrange(i0 as int, q as int) + ")"@);
                    }
                    let piece = markdown_escape(&tmp);
                    Some((m + clink.len(), piece))
                },
            }
        },
    }
}

fn cite_ref_try(s: &Vec<char>, i: usize) -> (m: Option<(usize, Vec<char>)>)
    requires
        i < s.len(),
    ensures
        match m {
            Some(t) => i < t.0 <= s.len() && cite_ref_match_at(s@, i as int) == Some(
                (t.0 as int, t.1@),
            ),
            None => cite_ref_match_at(s@, i as int) is None,
        },
{
    proof {
        reveal_strlit("<citerefentry>");
    }
    let copen = lit("<citerefentry>");
    if !match_at(s, &copen, i) {
        return None;
    }
    let a = scan_run(s, i + copen.len(), CharClass::Ws);
    let ropen = lit("<refentrytitle>");
    if !match_at(s, &ropen, a) {
        return None;
    }
    let t0 = a + ropen.len();
    let rclose = lit("</refentrytitle>");
    match find_from(s, &rclose, t0) {
        None => None,
        Some(t) => {
            let tl0 = scan_run(s, t0, CharClass::Ws);
            let tl = if tl0 > t {
                t
            } else {
                tl0
            };
            let rt = scan_rtrim(s, tl, t);
            let title = sub_vec(s, tl, rt);
            let b = scan_run(s, t + rclose.len(), CharClass::Ws);
            let mopen = lit("<manvolnum>");
            if !match_at(s, &mopen, b) {
                return None;
            }
            let v0 = b + mopen.len();
            let mclose = lit("</manvolnum>");
            match find_from(s, &mclose, v0) {
                None => None,
                Some(v) => {
                    let vl0 = scan_run(s, v0, CharClass::Ws);
                    let vl = if vl0 > v {
                        v
                    } else {
                        vl0
                    };
                    let vr = scan_rtrim(s, vl, v);
                    let vol = sub_vec(s, vl, vr);
                    let c = scan_run(s, v + mclose.len(), CharClass::Ws);
                    let cclose = lit("</citerefentry>");
                    if !match_at(s, &cclose, c) {
                        return None;
                    }
                    let mut piece = lit("{manpage}`");
                    push_all(&mut piece, &title);
                    push_all(&mut piece, &lit("("));
                    push_all(&mut piece, &vol);
                    push_all(&mut piece, &lit(")`"));
                    proof {
                        assert(piece@ =~= "{manpage}`"@ + s@.subrange(
                            tl as int,
                            rtrim_end(s@, tl as int, t as int),
                        ) + "("@ + s@.subrange(
                            vl as int,
                            rtrim_end(s@, vl as int, v as int),
                        ) + ")`"@);
                    }
                    Some((c + cclose.len(), piece))
                },
            }
        },
    }
}

fn prog_lang_try(s: &Vec<char>, i: usize) -> (m: Option<(usize, Vec<char>)>)
    requires
        i < s.len(),
    ensures
        match m {
            Some(t) => i < t.0 <= s.len() && prog_lang_match_at(s@, i as int) == Some(
                (t.0 as int, t.1@),
            ),
            None => prog_lang_match_at(s@, i as int) is None,
        },
{
    let popen = lit("<programlisting language=\"");
    if !match_at(s, &popen, i) {
        return None;
    }
    let l0 = i + popen.len();
    match find_char_from(s, '"', l0) {
        None => None,
        Some(q) => {
            if !(q > l0) {
                return None;
            }
            if !(q + 1 < s.len()) {
                return None;
            }
            if s[q + 1] != '>' {
                return None;
            }
            let mut piece = lit("```");
            push_all(&mut piece, &sub_vec(s, l0, q));
            proof {
                assert(piece@ =~= "```"@ + s@.subrange(l0 as int, q as int));
            }
            Some((q + 2, piece))
        },
    }
}

fn adm_scan(s: &Vec<char>, close: &Vec<char>, b0: usize) -> (m: Option<(usize, usize)>)
    requires
        b0 <= s.len(),
    ensures
        match m {
            Some(t) => b0 <= t.0 <= t.1 <= s.len() && adm_body_end(s@, close@, b0 as int)
                == Some((t.0 as int, t.1 as int)),
            None => adm_body_end(s@, close@, b0 as int) is None,
        },
{
    let cpara = lit("</para>");
    let mut p: usize = b0;
    loop
        invariant
            b0 <= p <= s.len(),
            cpara@ == "</para>"@,
            adm_body_end(s@, close@, b0 as int) == adm_body_end(s@, close@, p as int),
        decreases s.len() - p,
    {
        if match_at(s, &cpara, p) {
            let w = scan_run(s, p + cpara.len(), CharClass::Ws);
            if match_at(s, close, w) {
                proof {
                    assert(adm_body_end(s@, close@, p as int) == Some(
                        (
                            p as int,
                            run_end(s@, p as int + "</para>"@.len(), CharClass::Ws)
                                + close@.len(),
                        ),
                    ));
                }
                return Some((p, w + close.len()));
            }
        }
        if match_at(s, close, p) {
            proof {
                assert(adm_body_end(s@, close@, p as int) == Some(
                    (p as int, p as int + close@.len()),
                ));
            }
            return Some((p, p + close.len()));
        }
        if p == s.len() {
            proof {
                assert(adm_body_end(s@, close@, p as int) is None);
            }
            return None;
        }
        proof {
            assert(adm_body_end(s@, close@, p as int) == adm_body_end(
                s@,
                close@,
                p as int + 1,
            ));
        }
        p += 1;
    }
}

fn adm_try(
    s: &Vec<char>,
    i: usize,
    open: &Vec<char>,
    close: &Vec<char>,
    cls: &Vec<char>,
    bol: bool,
) -> (m: Option<(usize, Vec<char>)>)
    requires
        i < s.len(),
        open@.len() > 0,
    ensures
        match m {
            Some(t) => i < t.0 <= s.len() && adm_match_at(
                s@,
                i as int,
                open@,
                close@,
                cls@,
                bol,
            ) == Some((t.0 as int, t.1@)),
            None => adm_match_at(s@, i as int, open@, close@, cls@, bol) is None,
        },
{
    if !bol {
        return None;
    }
    let e = scan_run(s, i, CharClass::Space);
    if !match_at(s, open, e) {
        return None;
    }
    let after = e + open.len();
    let w = scan_run(s, after, CharClass::Ws);
    let para = lit("<para>");
    let b0 = if match_at(s, &para, w) {
        w + para.len()
    } else {
        after
    };
    match adm_scan(s, close, b0) {
        None => None,
        Some(be) => {
            let (bend, mend) = be;
            let ind = sub_vec(s, i, e);
            let mut piece: Vec<char> = Vec::new();
            push_all(&mut piece, &ind);
            push_all(&mut piece, &lit("::: {"));
            push_all(&mut piece, cls);
            push_all(&mut piece, &lit("}\n"));
            push_all(&mut piece, &ind);
            push_all(&mut piece, &sub_vec(s, b0, bend));
            push_all(&mut piece, &lit("\n"));
            push_all(&mut piece, &ind);
            push_all(&mut piece, &lit(":::"));
            proof {
                let ind_s = s@.subrange(i as int, e as int);
                assert(piece@ =~= ind_s + "::: {"@ + cls@ + "}\n"@ + ind_s + s@.subrange(
                    b0 as int,
                    bend as int,
                ) + "\n"@ + ind_s + ":::"@);
            }
            Some((mend, piece))
        },
    }
}

fn para_collapse_try(s: &Vec<char>, i: usize) -> (m: Option<(usize, Vec<char>)>)
    requires
        i < s.len(),
    ensures
        match m {
            Some(t) => i < t.0 <= s.len() && para_collapse_match_at(s@, i as int) == Some(
                (t.0 as int, t.1@),
            ),
            None => para_collapse_match_at(s@, i as int) is None,
        },
{
    if s[i] != '\n' {
        return None;
    }
    let n1 = scan_run(s, i, CharClass::Newline);
    let sp = scan_run(s, n1, CharClass::Space);
    let cpara = lit("</para>");
    if !match_at(s, &cpara, sp) {
        return None;
    }
    let k = sp + cpara.len();
    let opara = lit("<para>");
    let m = if k < s.len() && s[k] == '\n' {
        let r = scan_run(s, k + 1, CharClass::Space);
        if match_at(s, &opara, r) {
            r
        } else {
            k
        }
    } else {
        k
    };
    if !match_at(s, &opara, m) {
        return None;
    }
    let n2s = m + opara.len();
    let n2 = scan_run(s, n2s, CharClass::Newline);
    if n2 <= n2s {
        return None;
    }
    Some((n2, lit("\n\n")))
}

fn collapse_nl_try(s: &Vec<char>, i: usize) -> (m: Option<(usize, Vec<char>)>)
    requires
        i < s.len(),
    ensures
        match m {
            Some(t) => i < t.0 <= s.len() && collapse_nl_match_at(s@, i as int) == Some(
                (t.0 as int, t.1@),
            ),
            None => collapse_nl_match_at(s@, i as int) is None,
        },
{
    if s[i] != '\n' {
        return None;
    }
    let r = scan_run(s, i + 1, CharClass::Newline);
    proof {
        assert(run_end(s@, i as int, CharClass::Newline) == run_end(
            s@,
            i as int + 1,
            CharClass::Newline,
        ));
    }
    Some((r, lit("\n")))
}

fn ws_angle_try(s: &Vec<char>, i: usize) -> (m: Option<(usize, Vec<char>)>)
    requires
        i < s.len(),
    ensures
        match m {
            Some(t) => i < t.0 <= s.len() && ws_angle_match_at(s@, i as int) == Some(
                (t.0 as int, t.1@),
            ),
            None => ws_angle_match_at(s@, i as int) is None,
        },
{
    if !char_in_class(s[i], CharClass::Ws) {
        return None;
    }
    let w = scan_run(s, i + 1, CharClass::Ws);
    proof {
        assert(run_end(s@, i as int, CharClass::Ws) == run_end(s@, i as int + 1, CharClass::Ws));
    }
    if !(w < s.len()) {
        return None;
    }
    if s[w] != '<' && s[w] != '>' {
        return None;
    }
    let mut piece = lit("\n");
    push_all(&mut piece, &sub_vec(s, w, w + 1));
    proof {
        assert(piece@ =~= "\n"@ + s@.subrange(w as int, w as int + 1));
    }
    Some((w + 1, piece))
}

fn gt_ws_try(s: &Vec<char>, i: usize) -> (m: Option<(usize, Vec<char>)>)
    requires
        i < s.len(),
    ensures
        match m {
            Some(t) => i < t.0 <= s.len() && gt_ws_match_at(s@, i as int) == Some(
                (t.0 as int, t.1@),
            ),
            None => gt_ws_match_at(s@, i as int) is None,
        },
{
    if s[i] != '>' {
        return None;
    }
    let w = scan_run(s, i + 1, CharClass::Ws);
    if w <= i + 1 {
        return None;
    }
    Some((w, lit(">\n")))
}

fn prog_open_fix_try(s: &Vec<char>, i: usize) -> (m: Option<(usize, Vec<char>)>)
    requires
        i < s.len(),
    ensures
        match m {
            Some(t) => i < t.0 <= s.len() && prog_open_fix_match_at(s@, i as int) == Some(
                (t.0 as int, t.1@),
            ),
            None => prog_open_fix_match_at(s@, i as int) is None,
        },
{
    let k1 = if s[i] == '\n' {
        i + 1
    } else {
        i
    };
    let cpara = lit("</para>");
    let k2 = if match_at(s, &cpara, k1) {
        k1 + cpara.len()
    } else {
        k1
    };
    let popen = lit("<programlisting");
    if !match_at(s, &popen, k2) {
        return None;
    }
    let a0 = k2 + popen.len();
    match find_char_from(s, '>', a0) {
        None => None,
        Some(g) => {
            if !(g + 1 < s.len()) {
                return None;
            }
            if s[g + 1] != '\n' {
                return None;
            }
            let mut piece = lit("</para><programlisting");
            push_all(&mut piece, &sub_vec(s, a0, g));
            push_all(&mut piece, &lit(">"));
            proof {
                assert(piece@ =~= "</para><programlisting"@ + s@.subrange(
                    a0 as int,
                    g as int,
                ) + ">"@);
            }
            Some((g + 2, piece))
        },
    }
}

fn prog_close_fix_try(s: &Vec<char>, i: usize, bol: bool) -> (m: Option<(usize, Vec<char>)>)
    requires
        i < s.len(),
    ensures
        match m {
            Some(t) => i < t.0 <= s.len() && prog_close_fix_match_at(s@, i as int, bol) == Some(
                (t.0 as int, t.1@),
            ),
            None => prog_close_fix_match_at(s@, i as int, bol) is None,
        },
{
    proof {
        reveal_strlit("</programlisting>");
    }
    if !bol {
        return None;
    }
    let pclose = lit("</programlisting>");
    if !match_at(s, &pclose, i) {
        return None;
    }
    let k0 = i + pclose.len();
    let cpara = lit("</para>");
    let opara = lit("<para>");
    let k1 = if k0 < s.len() && s[k0] == '\n' && match_at(s, &cpara, k0 + 1) {
        k0 + 1 + cpara.len()
    } else if match_at(s, &cpara, k0) {
        k0 + cpara.len()
    } else {
        k0
    };
    let k2 = if k1 < s.len() && s[k1] == '\n' && match_at(s, &opara, k1 + 1) {
        k1 + 1 + opara.len()
    } else if match_at(s, &opara, k1) {
        k1 + opara.len()
    } else {
        k1
    };
    let k3 = if k2 < s.len() && s[k2] == '\n' {
        k2 + 1
    } else {
        k2
    };
    Some((k3, lit("</programlisting><para>")))
}

fn para_para_fix_try(s: &Vec<char>, i: usize) -> (m: Option<(usize, Vec<char>)>)
    requires
        i < s.len(),
    ensures
        match m {
            Some(t) => i < t.0 <= s.len() && para_para_fix_match_at(s@, i as int) == Some(
                (t.0 as int, t.1@),
            ),
            None => para_para_fix_match_at(s@, i as int) is None,
        },
{
    proof {
        reveal_strlit("<para>");
    }
    let w1 = scan_run(s, i, CharClass::Ws);
    let cpara = lit("</para>");
    if !match_at(s, &cpara, w1) {
        return None;
    }
    let w2 = scan_run(s, w1 + cpara.len(), CharClass::Ws);
    let opara = lit("<para>");
    if !match_at(s, &opara, w2) {
        return None;
    }
    let w3 = scan_run(s, w2 + opara.len(), CharClass::Ws);
    Some((w3, lit("\n</para><para>\n")))
}

fn cite_link_fix_try(s: &Vec<char>, i: usize) -> (m: Option<(usize, Vec<char>)>)
    requires
        i < s.len(),
    ensures
        match m {
            Some(t) => i < t.0 <= s.len() && cite_link_fix_match_at(s@, i as int) == Some(
                (t.0 as int, t.1@),
            ),
            None => cite_link_fix_match_at(s@, i as int) is None,
        },
{
    let lopen = lit("<link xlink:href=\"");
    if !match_at(s, &lopen, i) {
        return None;
    }
    let u0 = i + lopen.len();
    match find_char_from(s, '"', u0) {
        None => None,
        Some(q) => {
            if !(q > u0) {
                return None;
            }
            if !(q + 1 < s.len()) {
                return None;
            }
            if s[q + 1] != '>' {
                return None;
            }
            let b0 = q + 2;
            let copen = lit("<citerefentry>");
            if !match_at(s, &copen, b0) {
                return None;
            }
            let from = b0 + copen.len();
            let hi = match find_char_from(s, '\n', from) {
                Some(nl) => nl,
                None => s.len(),
            };
            let both = lit("</citerefentry></link>");
            match find_last_from(s, &both, from, hi) {
                None => None,
                Some(j) => {
                    proof {
                        reveal_strlit("</citerefentry>");
                        reveal_strlit("</citerefentry></link>");
                    }
                    let cclose = lit("</citerefentry>");
                    let piece = sub_vec(s, b0, j + cclose.len());
                    Some((j + both.len(), piece))
                },
            }
        },
    }
}

/// What rule `r` matches at `i`: the exec mirror of `rule_match_at`.
pub fn try_match(r: &Rule, s: &Vec<char>, i: usize, bol: bool) -> (m: Option<(usize, Vec<char>)>)
    requires
        i < s.len(),
        rule_wf(r@),
    ensures
        match m {
            Some(t) => i < t.0 <= s.len() && rule_match_at(r@, s@, i as int, bol) == Some(
                (t.0 as int, t.1@),
            ),
            None => rule_match_at(r@, s@, i as int, bol) is None,
        },
{
    match r {
        Rule::Elem { pre, open, close, bad, post, mode } => elem_try(
            s,
            i,
            pre,
            open,
            close,
            *bad,
            post,
            *mode,
        ),
        Rule::LinkSelf => link_self_try(s, i),
        Rule::LinkBody => link_body_try(s, i),
        Rule::Xref => xref_try(s, i),
        Rule::LinkRef => link_ref_try(s, i),
        Rule::CiteRef => cite_ref_try(s, i),
        Rule::ProgLang => prog_lang_try(s, i),
        Rule::Adm { open, close, cls } => adm_try(s, i, open, close, cls, bol),
        Rule::ParaCollapse => para_collapse_try(s, i),
        Rule::CollapseNl => collapse_nl_try(s, i),
        Rule::WsAngle => ws_angle_try(s, i),
        Rule::GtWs => gt_ws_try(s, i),
        Rule::ProgOpenFix => prog_open_fix_try(s, i),
        Rule::ProgCloseFix => prog_close_fix_try(s, i, bol),
        Rule::ParaParaFix => para_para_fix_try(s, i),
        Rule::CiteLinkFix => cite_link_fix_try(s, i),
    }
}

/// Applies rule `r` to all of `s`, left to right, replacing every match.
pub fn run_rule(r: &Rule, s: &Vec<char>) -> (out: Vec<char>)
    requires
        rule_wf(r@),
    ensures
        out@ == run_rule_spec(r@, s@),
{
    let mut out: Vec<char> = Vec::new();
    let mut i: usize = 0;
    let mut bol: bool = true;
    while i < s.len()
        invariant
            i <= s.len(),
            rule_wf(r@),
            run_rule_spec(r@, s@) == out@ + apply_from(r@, s@, i as int, bol),
        decreases s.len() - i,
    {
        match try_match(r, s, i, bol) {
            Some(t) => {
                let (end, piece) = t;
                proof {
                    assert(apply_from(r@, s@, i as int, bol) == piece@ + apply_from(
                        r@,
                        s@,
                        end as int,
                        s@[end as int - 1] == '\n',
                    ));
                    assert(out@ + (piece@ + apply_from(
                        r@,
                        s@,
                        end as int,
                        s@[end as int - 1] == '\n',
                    )) =~= (out@ + piece@) + apply_from(
                        r@,
                        s@,
                        end as int,
                        s@[end as int - 1] == '\n',
                    ));
                }
                bol = s[end - 1] == '\n';
                push_all(&mut out, &piece);
                i = end;
            },
            None => {
                proof {
                    assert(apply_from(r@, s@, i as int, bol) == seq![s@[i as int]] + apply_from(
                        r@,
                        s@,
                        i as int + 1,
                        s@[i as int] == '\n',
                    ));
                    assert(out@ + (seq![s@[i as int]] + apply_from(
                        r@,
                        s@,
                        i as int + 1,
                        s@[i as int] == '\n',
                    )) =~= out@.push(s@[i as int]) + apply_from(
                        r@,
                        s@,
                        i as int + 1,
                        s@[i as int] == '\n',
                    ));
                }
                bol = s[i] == '\n';
                out.push(s[i]);
                i += 1;
            },
        }
    }
    proof {
        assert(out@ + apply_from(r@, s@, i as int, bol) =~= out@);
    }
    out
}

} // verus!
