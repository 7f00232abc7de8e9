use xml_writer::XmlWriter;

#[test]
fn compact_attr_then_end() {
    let mut xml = XmlWriter::compact_mode(String::new());
    xml.begin_elem("a");
    xml.attr("x", "1");
    xml.end_elem();
    assert_eq!(xml.into_inner(), "<a x=\"1\"></a>");
}

#[test]
fn fully_pretty_childless_self_closes() {
    let mut xml = XmlWriter::very_pretty_mode(String::new());
    xml.begin_elem("a");
    xml.end_elem();
    assert_eq!(xml.into_inner(), "<a/>");
}

#[test]
fn fully_pretty_child_forces_closing_tag() {
    let mut xml = XmlWriter::very_pretty_mode(String::new());
    xml.begin_elem("a");
    xml.text("hi");
    xml.end_elem();
    assert_eq!(xml.into_inner(), "<a>\n  hi\n</a>");
}

#[test]
fn pretty_nested_indentation() {
    let mut xml = XmlWriter::pretty_mode(String::new());
    xml.begin_elem("a");
    xml.begin_elem("b");
    xml.end_elem();
    xml.end_elem();
    assert_eq!(xml.into_inner(), "<a>\n  <b></b></a>");
}

#[test]
fn pretty_two_spaces_per_depth() {
    let mut xml = XmlWriter::pretty_mode(String::new());
    xml.begin_elem("a");
    xml.begin_elem("b");
    xml.begin_elem("c");
    xml.close();
    assert_eq!(xml.into_inner(), "<a>\n  <b>\n    <c></c></b></a>");
}

#[test]
fn namespace_captured_at_open_time() {
    let mut xml = XmlWriter::compact_mode(String::new());
    xml.namespace = Some("s".to_string());
    xml.begin_elem("n");
    xml.namespace = None;
    xml.end_elem();
    assert_eq!(xml.into_inner(), "<s:n></s:n>");
}

#[test]
fn namespace_change_between_siblings() {
    let mut xml = XmlWriter::compact_mode(String::new());
    xml.namespace = Some("a".to_string());
    xml.begin_elem("x");
    xml.namespace = Some("b".to_string());
    xml.elem("y");
    xml.end_elem();
    assert_eq!(xml.into_inner(), "<a:x><b:y/></a:x>");
}

#[test]
fn elem_text_escapes() {
    let mut xml = XmlWriter::compact_mode(String::new());
    xml.elem_text("t", "<&>");
    assert_eq!(xml.into_inner(), "<t>&lt;&amp;&gt;</t>");
}

#[test]
fn escaped_attr_replaces_all_five() {
    let mut xml = XmlWriter::compact_mode(String::new());
    xml.begin_elem("e");
    xml.attr_esc("k", "\"'&<>");
    xml.end_elem();
    assert_eq!(xml.into_inner(), "<e k=\"&quot;&apos;&amp;&lt;&gt;\"></e>");
}

#[test]
fn escaped_identifier_doubles_backslash() {
    let mut xml = XmlWriter::compact_mode(String::new());
    xml.begin_elem("e");
    xml.attr_esc("a\\b", "c\\d");
    xml.end_elem();
    // the backslash doubles in the name (identifier) but not the value
    assert_eq!(xml.into_inner(), "<e a\\\\b=\"c\\d\"></e>");
}

#[test]
fn raw_paths_leave_specials_untouched() {
    let mut xml = XmlWriter::compact_mode(String::new());
    xml.begin_elem("e");
    xml.attr("k", "<&>");
    xml.end_elem();
    xml.write("'<raw>'");
    assert_eq!(xml.into_inner(), "<e k=\"<&>\"></e>'<raw>'");
}

#[test]
fn pretty_root_comments_stay_on_one_line() {
    // at depth zero pretty mode adds no newline, even between siblings
    let mut xml = XmlWriter::pretty_mode(String::new());
    xml.comment("hi");
    xml.comment("again");
    assert_eq!(xml.into_inner(), "<!-- hi --><!-- again -->");
}

#[test]
fn fully_pretty_root_comments_get_own_lines() {
    // the very first line is not preceded by a newline, every later one is
    let mut xml = XmlWriter::very_pretty_mode(String::new());
    xml.comment("hi");
    xml.comment("again");
    assert_eq!(xml.into_inner(), "<!-- hi -->\n<!-- again -->");
}

#[test]
fn compact_output_has_no_newline_at_any_depth() {
    let mut xml = XmlWriter::compact_mode(String::new());
    for _ in 0..8 {
        xml.begin_elem("d");
        xml.comment("c");
        xml.text("t");
    }
    xml.close();
    let actual = xml.into_inner();
    assert!(!actual.contains('\n'));
    assert!(!actual.contains("  "));
}

#[test]
fn close_on_empty_stack_is_noop() {
    let mut xml = XmlWriter::compact_mode(String::new());
    xml.elem("x");
    xml.close();
    xml.close();
    assert_eq!(xml.into_inner(), "<x/>");
}

#[test]
fn close_pops_all_open_elements() {
    let mut xml = XmlWriter::compact_mode(String::new());
    xml.begin_elem("a");
    xml.begin_elem("b");
    xml.begin_elem("c");
    xml.close();
    assert_eq!(xml.into_inner(), "<a><b><c></c></b></a>");
}

#[test]
fn balanced_sequence_leaves_nothing_for_close() {
    let mut xml = XmlWriter::compact_mode(String::new());
    xml.begin_elem("a");
    xml.begin_elem("b");
    xml.end_elem();
    xml.end_elem();
    xml.close();
    assert_eq!(xml.into_inner(), "<a><b></b></a>");
}

#[test]
fn dtd_writes_declaration_line() {
    let mut xml = XmlWriter::compact_mode(String::new());
    xml.dtd("UTF-8");
    xml.elem("r");
    assert_eq!(
        xml.into_inner(),
        "<?xml version=\"1.0\" encoding=\"UTF-8\" ?>\n<r/>"
    );
}

#[test]
fn elem_marks_parent() {
    // a self-closing child counts as a child: the parent never
    // self-closes and gets its own closing tag
    let mut xml = XmlWriter::very_pretty_mode(String::new());
    xml.begin_elem("a");
    xml.elem("b");
    xml.end_elem();
    assert_eq!(xml.into_inner(), "<a>\n  <b/>\n</a>");
}

#[test]
fn elem_text_marks_parent() {
    let mut xml = XmlWriter::very_pretty_mode(String::new());
    xml.begin_elem("a");
    xml.elem_text("b", "t");
    xml.end_elem();
    assert_eq!(xml.into_inner(), "<a>\n  <b>t</b>\n</a>");
}

#[test]
fn elem_and_empty_elem_agree() {
    let mut first = XmlWriter::very_pretty_mode(String::new());
    first.begin_elem("a");
    first.elem("b");
    first.end_elem();
    let mut second = XmlWriter::very_pretty_mode(String::new());
    second.begin_elem("a");
    second.empty_elem("b");
    second.end_elem();
    assert_eq!(first.into_inner(), second.into_inner());
}

#[test]
fn set_namespace_prefixes_later_elements() {
    let mut xml = XmlWriter::compact_mode(String::new());
    xml.set_namespace(Some("s".to_string()));
    xml.begin_elem("n");
    xml.set_namespace(None);
    xml.end_elem();
    assert_eq!(xml.into_inner(), "<s:n></s:n>");
}

#[test]
fn empty_elem_marks_parent() {
    let mut xml = XmlWriter::very_pretty_mode(String::new());
    xml.begin_elem("a");
    xml.empty_elem("b");
    xml.end_elem();
    assert_eq!(xml.into_inner(), "<a>\n  <b/>\n</a>");
}

#[test]
fn mode_switch_does_not_reformat() {
    let mut xml = XmlWriter::compact_mode(String::new());
    xml.begin_elem("a");
    xml.set_pretty_mode();
    xml.begin_elem("b");
    xml.end_elem();
    xml.set_compact_mode();
    xml.begin_elem("c");
    xml.end_elem();
    xml.end_elem();
    assert_eq!(xml.into_inner(), "<a>\n  <b></b><c></c></a>");
}

#[test]
fn set_very_pretty_mode_switch() {
    let mut xml = XmlWriter::compact_mode(String::new());
    xml.set_very_pretty_mode();
    xml.begin_elem("a");
    xml.end_elem();
    assert_eq!(xml.into_inner(), "<a/>");
}

#[test]
fn ns_decl_writes_xmlns_attributes() {
    let nsmap = vec![(None, "u1"), (Some("p"), "u2")];
    let mut xml = XmlWriter::compact_mode(String::new());
    xml.begin_elem("r");
    xml.ns_decl(&nsmap);
    xml.end_elem();
    assert_eq!(xml.into_inner(), "<r xmlns=\"u1\" xmlns:p=\"u2\"></r>");
}

#[test]
fn ns_decl_empty_writes_nothing() {
    let nsmap: Vec<(Option<&str>, &str)> = Vec::new();
    let mut xml = XmlWriter::compact_mode(String::new());
    xml.begin_elem("r");
    xml.ns_decl(&nsmap);
    xml.end_elem();
    assert_eq!(xml.into_inner(), "<r></r>");
}

#[test]
fn cdata_content_is_raw() {
    let mut xml = XmlWriter::compact_mode(String::new());
    xml.begin_elem("r");
    xml.cdata("<&>");
    xml.end_elem();
    assert_eq!(xml.into_inner(), "<r><![CDATA[<&>]]></r>");
}

#[test]
fn text_escapes_quotes() {
    let mut xml = XmlWriter::compact_mode(String::new());
    xml.begin_elem("r");
    xml.text("a\"b'c");
    xml.end_elem();
    assert_eq!(xml.into_inner(), "<r>a&quot;b&apos;c</r>");
}

#[test]
fn multibyte_text_passes_through() {
    let mut xml = XmlWriter::compact_mode(String::new());
    xml.elem_text("t", "héllo wörld ✓");
    assert_eq!(xml.into_inner(), "<t>héllo wörld ✓</t>");
}

#[test]
fn writer_appends_to_given_sink() {
    let mut xml = XmlWriter::compact_mode("prefix:".to_string());
    xml.elem("x");
    assert_eq!(xml.into_inner(), "prefix:<x/>");
}

#[test]
fn empty_text_adds_nothing() {
    let mut xml = XmlWriter::compact_mode(String::new());
    xml.begin_elem("a");
    xml.text("");
    xml.end_elem();
    assert_eq!(xml.into_inner(), "<a></a>");
}

#[test]
fn empty_elem_text_value() {
    let mut xml = XmlWriter::compact_mode(String::new());
    xml.elem_text("t", "");
    assert_eq!(xml.into_inner(), "<t></t>");
}

#[test]
fn attr_esc_with_empty_value() {
    let mut xml = XmlWriter::compact_mode(String::new());
    xml.begin_elem("e");
    xml.attr_esc("k", "");
    xml.end_elem();
    assert_eq!(xml.into_inner(), "<e k=\"\"></e>");
}

#[test]
fn fully_pretty_cdata_indents() {
    let mut xml = XmlWriter::very_pretty_mode(String::new());
    xml.begin_elem("r");
    xml.cdata("d");
    xml.end_elem();
    assert_eq!(xml.into_inner(), "<r>\n  <![CDATA[d]]>\n</r>");
}
