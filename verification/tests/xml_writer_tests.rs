use xml_writer::XmlWriter;

#[test]
fn compact() {
    let nsmap = vec![
        (None, "http://localhost/"),
        (Some("st"), "http://127.0.0.1/"),
    ];
    let mut xml = XmlWriter::compact_mode(String::new());
    xml.begin_elem("OTDS");
    xml.ns_decl(&nsmap);
    xml.comment("nice to see you");
    xml.namespace = Some("st".to_string());
    xml.empty_elem("success");
    xml.begin_elem("node");
    xml.attr_esc("name", "\"123\"");
    xml.attr("id", "abc");
    xml.attr("'unescaped'", "\"123\""); // this WILL generate invalid xml
    xml.text("'text'");
    xml.end_elem();
    xml.namespace = None;
    xml.begin_elem("stuff");
    xml.cdata("blablab");
    xml.close();
    xml.flush();

    let actual = xml.into_inner();
    assert_eq!(actual, "<OTDS xmlns=\"http://localhost/\" xmlns:st=\"http://127.0.0.1/\"><!-- nice to see you --><st:success/><st:node name=\"&quot;123&quot;\" id=\"abc\" \'unescaped\'=\"\"123\"\">&apos;text&apos;</st:node><stuff><![CDATA[blablab]]></stuff></OTDS>");
}

#[test]
fn pretty() {
    let nsmap = vec![
        (None, "http://localhost/"),
        (Some("st"), "http://127.0.0.1/"),
    ];
    let mut xml = XmlWriter::pretty_mode(String::new());
    xml.begin_elem("OTDS");
    xml.ns_decl(&nsmap);
    xml.comment("nice to see you");
    xml.namespace = Some("st".to_string());
    xml.empty_elem("success");
    xml.begin_elem("node");
    xml.attr_esc("name", "\"123\"");
    xml.attr("id", "abc");
    xml.attr("'unescaped'", "\"123\""); // this WILL generate invalid xml
    xml.text("'text'");
    xml.end_elem();
    xml.namespace = None;
    xml.begin_elem("stuff");
    xml.cdata("blablab");
    xml.close();
    xml.flush();

    let actual = xml.into_inner();
    assert_eq!(actual, "<OTDS xmlns=\"http://localhost/\" xmlns:st=\"http://127.0.0.1/\">\n  <!-- nice to see you -->\n  <st:success/>\n  <st:node name=\"&quot;123&quot;\" id=\"abc\" \'unescaped\'=\"\"123\"\">&apos;text&apos;</st:node>\n  <stuff><![CDATA[blablab]]></stuff></OTDS>");
}

#[test]
fn very_pretty() {
    let nsmap = vec![
        (None, "http://localhost/"),
        (Some("st"), "http://127.0.0.1/"),
    ];
    let mut xml = XmlWriter::very_pretty_mode(String::new());
    xml.begin_elem("OTDS");
    xml.ns_decl(&nsmap);
    xml.comment("nice to see you");
    xml.namespace = Some("st".to_string());
    xml.empty_elem("success");
    xml.begin_elem("node");
    xml.attr_esc("name", "\"123\"");
    xml.attr("id", "abc");
    xml.attr("'unescaped'", "\"123\""); // this WILL generate invalid xml
    xml.text("'text'");
    xml.end_elem();
    xml.namespace = None;
    xml.begin_elem("stuff");
    xml.cdata("blablab");
    xml.close();
    xml.flush();

    let actual = xml.into_inner();
    assert_eq!(actual, "<OTDS xmlns=\"http://localhost/\" xmlns:st=\"http://127.0.0.1/\">\n  <!-- nice to see you -->\n  <st:success/>\n  <st:node name=\"&quot;123&quot;\" id=\"abc\" \'unescaped\'=\"\"123\"\">\n    &apos;text&apos;\n  </st:node>\n  <stuff>\n    <![CDATA[blablab]]>\n  </stuff>\n</OTDS>");
}

#[test]
fn comment() {
    let mut xml = XmlWriter::pretty_mode(String::new());
    xml.comment("comment");

    let actual = xml.into_inner();
    assert_eq!(actual, "<!-- comment -->");
}
