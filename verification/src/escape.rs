//! Escaping and entity decoding for inline text that the transducer inserts
//! into the target dialect.

use vstd::prelude::*;
use crate::text::{
    is_at, lemma_replace_absent, lit, repl_from, replace_lit, replace_lit_spec, seq_has_no,
};

verus! {

/// Entity decoding used inside code spans: `&gt;` and `&lt;` become literal
/// angle brackets, in that order.
pub open spec fn decode_angles_spec(s: Seq<char>) -> Seq<char> {
    replace_lit_spec(replace_lit_spec(s, "&gt;"@, ">"@), "&lt;"@, "<"@)
}

/// Escaping for inserted inline text: backtick and asterisk are
/// backslash-escaped, then the three standard markup entities are decoded
/// back to literal `<`, `>` and `&`.
pub open spec fn markdown_escape_spec(s: Seq<char>) -> Seq<char> {
    replace_lit_spec(
        replace_lit_spec(
            replace_lit_spec(
                replace_lit_spec(replace_lit_spec(s, "`"@, "\\`"@), "*"@, "\\*"@),
                "&lt;"@,
                "<"@,
            ),
            "&gt;"@,
            ">"@,
        ),
        "&amp;"@,
        "&"@,
    )
}

/// Decodes `&gt;` and `&lt;` to the literal angle brackets.
pub fn decode_angles(s: &Vec<char>) -> (r: Vec<char>)
    ensures
        r@ == decode_angles_spec(s@),
{
    let a = replace_lit(s, &lit("&gt;"), &lit(">"));
    replace_lit(&a, &lit("&lt;"), &lit("<"))
}

/// Every occurrence of `c` in `s` stands right after a backslash.
pub open spec fn escaped_in(s: Seq<char>, c: char) -> bool {
    forall|j: int| 0 <= j < s.len() && #[trigger] s[j] == c ==> j > 0 && s[j - 1] == '\\'
}

/// Replacing every `c` by backslash-`c` leaves every `c` escaped, and
/// none at the front.
proof fn lemma_repl_escapes(s: Seq<char>, p: Seq<char>, r: Seq<char>, c: char, i: int)
    requires
        p.len() == 1,
        p[0] == c,
        c != '\\',
        r.len() == 2,
        r[0] == '\\',
        r[1] == c,
        0 <= i,
    ensures
        escaped_in(repl_from(s, p, r, i), c),
        repl_from(s, p, r, i).len() > 0 ==> repl_from(s, p, r, i)[0] != c,
    decreases s.len() - i,
{
    if i >= s.len() {
    } else if is_at(s, p, i) {
        lemma_repl_escapes(s, p, r, c, i + 1);
        let rest = repl_from(s, p, r, i + 1);
        let out = repl_from(s, p, r, i);
        assert(out == r + rest);
        assert forall|j: int| 0 <= j < out.len() && #[trigger] out[j] == c implies j > 0 && out[
            j - 1
        ] == '\\' by {
            if j >= 2 {
                assert(out[j] == rest[j - 2]);
                assert(rest[j - 2] == c ==> j - 2 > 0 && rest[j - 3] == '\\');
                if j >= 3 {
                    assert(out[j - 1] == rest[j - 3]);
                }
            }
        }
    } else {
        assert(s[i] != c) by {
            if s[i] == c {
                assert forall|j: int| 0 <= j < p.len() implies s[i + j] == p[j] by {
                    assert(j == 0);
                }
                assert(is_at(s, p, i));
            }
        }
        lemma_repl_escapes(s, p, r, c, i + 1);
        let rest = repl_from(s, p, r, i + 1);
        let out = repl_from(s, p, r, i);
        assert(out == seq![s[i]] + rest);
        assert forall|j: int| 0 <= j < out.len() && #[trigger] out[j] == c implies j > 0 && out[
            j - 1
        ] == '\\' by {
            if j >= 1 {
                assert(out[j] == rest[j - 1]);
                assert(rest[j - 1] == c ==> j - 1 > 0 && rest[j - 2] == '\\');
                if j >= 2 {
                    assert(out[j - 1] == rest[j - 2]);
                }
            }
        }
    }
}

/// A replacement whose pattern holds neither `c` nor a backslash, and
/// whose replacement holds no `c`, keeps every `c` escaped.
proof fn lemma_repl_keeps_escaped(s: Seq<char>, p: Seq<char>, r: Seq<char>, c: char, i: int)
    requires
        p.len() >= 1,
        seq_has_no(p, c),
        seq_has_no(p, '\\'),
        seq_has_no(r, c),
        escaped_in(s, c),
        0 <= i,
    ensures
        ({
            let out = repl_from(s, p, r, i);
            forall|j: int|
                0 <= j < out.len() && #[trigger] out[j] == c ==> (j > 0 && out[j - 1] == '\\')
                    || (j == 0 && i > 0 && s[i - 1] == '\\')
        }),
    decreases s.len() - i,
{
    if i >= s.len() {
    } else if is_at(s, p, i) {
        lemma_repl_keeps_escaped(s, p, r, c, i + p.len() as int);
        let rest = repl_from(s, p, r, i + p.len() as int);
        let out = repl_from(s, p, r, i);
        assert(out == r + rest);
        assert(rest.len() > 0 ==> rest[0] != c) by {
            if rest.len() > 0 && rest[0] == c {
                assert(s[i + p.len() - 1] == p[p.len() - 1]);
            }
        }
        assert forall|j: int| 0 <= j < out.len() && #[trigger] out[j] == c implies (j > 0 && out[
            j - 1
        ] == '\\') || (j == 0 && i > 0 && s[i - 1] == '\\') by {
            if j >= r.len() {
                assert(out[j] == rest[j - r.len()]);
                assert(j - r.len() > 0);
                assert(out[j - 1] == rest[j - r.len() - 1]);
            }
        }
    } else {
        lemma_repl_keeps_escaped(s, p, r, c, i + 1);
        let rest = repl_from(s, p, r, i + 1);
        let out = repl_from(s, p, r, i);
        assert(out == seq![s[i]] + rest);
        assert forall|j: int| 0 <= j < out.len() && #[trigger] out[j] == c implies (j > 0 && out[
            j - 1
        ] == '\\') || (j == 0 && i > 0 && s[i - 1] == '\\') by {
            if j == 0 {
                assert(out[0] == s[i]);
            } else {
                assert(out[j] == rest[j - 1]);
                if j == 1 {
                    assert(rest[0] == c ==> i + 1 > 0 && s[i] == '\\');
                    assert(out[0] == s[i]);
                } else {
                    assert(out[j - 1] == rest[j - 2]);
                }
            }
        }
    }
}

/// Escaping correctness, the universal half: in an escaped text, every
/// backtick and every asterisk stands right after a backslash.
pub proof fn lemma_escape_escapes_specials(s: Seq<char>)
    ensures
        escaped_in(markdown_escape_spec(s), '`'),
        escaped_in(markdown_escape_spec(s), '*'),
{
    reveal_strlit("`");
    reveal_strlit("\\`");
    reveal_strlit("*");
    reveal_strlit("\\*");
    reveal_strlit("&lt;");
    reveal_strlit("<");
    reveal_strlit("&gt;");
    reveal_strlit(">");
    reveal_strlit("&amp;");
    reveal_strlit("&");
    let a = replace_lit_spec(s, "`"@, "\\`"@);
    let b = replace_lit_spec(a, "*"@, "\\*"@);
    let d = replace_lit_spec(b, "&lt;"@, "<"@);
    let e = replace_lit_spec(d, "&gt;"@, ">"@);
    lemma_repl_escapes(s, "`"@, "\\`"@, '`', 0);
    lemma_repl_keeps_escaped(a, "*"@, "\\*"@, '`', 0);
    lemma_repl_escapes(a, "*"@, "\\*"@, '*', 0);
    lemma_repl_keeps_escaped(b, "&lt;"@, "<"@, '`', 0);
    lemma_repl_keeps_escaped(b, "&lt;"@, "<"@, '*', 0);
    lemma_repl_keeps_escaped(d, "&gt;"@, ">"@, '`', 0);
    lemma_repl_keeps_escaped(d, "&gt;"@, ">"@, '*', 0);
    lemma_repl_keeps_escaped(e, "&amp;"@, "&"@, '`', 0);
    lemma_repl_keeps_escaped(e, "&amp;"@, "&"@, '*', 0);
}

/// Escaping is the identity on plain text: a text without backtick,
/// asterisk or ampersand has nothing to escape and no entity to decode.
pub proof fn lemma_escape_plain_identity(s: Seq<char>)
    requires
        seq_has_no(s, '`'),
        seq_has_no(s, '*'),
        seq_has_no(s, '&'),
    ensures
        markdown_escape_spec(s) == s,
{
    reveal_strlit("`");
    reveal_strlit("\\`");
    reveal_strlit("*");
    reveal_strlit("\\*");
    reveal_strlit("&lt;");
    reveal_strlit("<");
    reveal_strlit("&gt;");
    reveal_strlit(">");
    reveal_strlit("&amp;");
    reveal_strlit("&");
    lemma_replace_absent(s, "`"@, "\\`"@);
    lemma_replace_absent(s, "*"@, "\\*"@);
    lemma_replace_absent(s, "&lt;"@, "<"@);
    lemma_replace_absent(s, "&gt;"@, ">"@);
    lemma_replace_absent(s, "&amp;"@, "&"@);
}

/// Escapes backtick and asterisk and decodes the standard entities.
pub fn markdown_escape(s: &Vec<char>) -> (r: Vec<char>)
    ensures
        r@ == markdown_escape_spec(s@),
{
    let a = replace_lit(s, &lit("`"), &lit("\\`"));
    let b = replace_lit(&a, &lit("*"), &lit("\\*"));
    let c = replace_lit(&b, &lit("&lt;"), &lit("<"));
    let d = replace_lit(&c, &lit("&gt;"), &lit(">"));
    replace_lit(&d, &lit("&amp;"), &lit("&"))
}

} // verus!
