use mdmigrate::escape::markdown_escape;
use mdmigrate::transduce::{convert_chunk, convert_one};

fn chars(s: &str) -> Vec<char> {
    s.chars().collect()
}

fn string(v: &[char]) -> String {
    v.iter().collect()
}

#[test]
fn escape_backtick_and_asterisk() {
    let out = markdown_escape(&chars("a`b*c"));
    assert_eq!(string(&out), "a\\`b\\*c");
}

#[test]
fn escape_decodes_entities() {
    let out = markdown_escape(&chars("&lt;x&gt; &amp; y"));
    assert_eq!(string(&out), "<x> & y");
}

#[test]
fn escape_plain_text_unchanged() {
    let out = markdown_escape(&chars("plain text, no markup"));
    assert_eq!(string(&out), "plain text, no markup");
}

#[test]
fn literal_and_filename_chunk() {
    let chunk = chars("\"See <literal>foo</literal> and <filename>/etc/bar</filename>.\"");
    let out = convert_chunk(&chunk);
    assert_eq!(string(&out), "\"See `foo` and {file}`/etc/bar`.\"");
}

#[test]
fn literal_decodes_angle_entities() {
    let out = convert_chunk(&chars("<literal>a&lt;b&gt;c</literal>"));
    assert_eq!(string(&out), "`a<b>c`");
}

#[test]
fn option_and_command_chunks() {
    let out = convert_chunk(&chars("<option>x.y</option> <command>ls -l</command>"));
    assert_eq!(string(&out), "{option}`x.y` {command}`ls -l`");
}

#[test]
fn bare_link_is_autolinked() {
    let out = convert_chunk(&chars("<link xlink:href=\"https://e.com/a\"/>"));
    assert_eq!(string(&out), "<https://e.com/a>");
}

#[test]
fn link_with_body() {
    let out = convert_chunk(&chars("<link xlink:href=\"https://e.com\">site</link>"));
    assert_eq!(string(&out), "[site](https://e.com)");
}

#[test]
fn xref_self_reference() {
    let out = convert_chunk(&chars("<xref linkend=\"opt-id\"/>"));
    assert_eq!(string(&out), "[](#opt-id)");
}

#[test]
fn link_by_linkend() {
    let out = convert_chunk(&chars("<link linkend=\"sec\">the section</link>"));
    assert_eq!(string(&out), "[the section](#sec)");
}

#[test]
fn emphasis_plain_and_strong() {
    let out = convert_chunk(&chars("<emphasis>soft</emphasis>"));
    assert_eq!(string(&out), "*soft*");
    let strong = convert_chunk(&chars("<emphasis role=\"strong\">hard</emphasis>"));
    assert_eq!(string(&strong), "**hard**");
}

#[test]
fn emphasis_body_is_escaped() {
    let out = convert_chunk(&chars("<emphasis>a`b</emphasis>"));
    assert_eq!(string(&out), "*a\\`b*");
}

#[test]
fn manpage_reference() {
    let out = convert_chunk(&chars(
        "<citerefentry><refentrytitle>man</refentrytitle><manvolnum>5</manvolnum></citerefentry>",
    ));
    assert_eq!(string(&out), "{manpage}`man(5)`");
}

#[test]
fn manpage_reference_with_whitespace() {
    let out = convert_chunk(&chars(
        "<citerefentry>\n  <refentrytitle> man </refentrytitle>\n  <manvolnum> 5 </manvolnum>\n</citerefentry>",
    ));
    assert_eq!(string(&out), "{manpage}`man(5)`");
}

#[test]
fn program_listing_fences() {
    let out = convert_chunk(&chars(
        "<programlisting language=\"nix\">\ncode\n</programlisting>",
    ));
    assert_eq!(string(&out), "```nix\ncode\n```");
}

#[test]
fn varname_and_envar() {
    let out = convert_chunk(&chars("<varname>a</varname> <envar>HOME</envar>"));
    assert_eq!(string(&out), "{var}`a` {env}`HOME`");
}

#[test]
fn admonition_reproduces_indentation() {
    let out = convert_chunk(&chars("  <note>one</note>"));
    assert_eq!(string(&out), "  ::: {.note}\n  one\n  :::");
}

#[test]
fn two_admonitions_two_indents() {
    let out = convert_chunk(&chars(
        "  <note>one</note>\n    <warning>two</warning>",
    ));
    assert_eq!(
        string(&out),
        "  ::: {.note}\n  one\n  :::\n    ::: {.warning}\n    two\n    :::"
    );
}

#[test]
fn admonition_with_para_markers() {
    let out = convert_chunk(&chars("<important>\n<para>p</para>\n</important>"));
    assert_eq!(string(&out), "::: {.important}\np\n:::");
}

#[test]
fn paragraph_markers_collapse() {
    let out = convert_chunk(&chars("a\n\n</para>\n<para>\n\nb"));
    assert_eq!(string(&out), "a\n\nb");
}

#[test]
fn empty_chunk_stays_empty() {
    assert_eq!(string(&convert_chunk(&chars(""))), "");
    assert_eq!(string(&markdown_escape(&chars(""))), "");
}

#[test]
fn convert_one_wraps_marker() {
    let s = chars("x = \"<literal>y</literal>\";");
    let out = convert_one(&s, 4, 26, false);
    assert_eq!(string(&out), "x = lib.mdDoc \"`y`\";");
}

#[test]
fn convert_one_adds_parens() {
    let s = chars("mkEnableOption \"widget support\"");
    let out = convert_one(&s, 15, 31, true);
    assert_eq!(string(&out), "mkEnableOption (lib.mdDoc \"widget support\")");
}
